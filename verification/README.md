# mixlab_workspace

The workspace of a modular audio mixer. Modules are shown as windows that can be dragged about,
and wired to each other from outputs to inputs. The library decides what every event does to the
workspace and to the state that it shows, and what there is to see; all of it is verified with
Verus. The components in `app/` carry this out in the browser, with yew.

- `src/protocol.rs`, `src/state.rs`: modules, terminals, connections, and the messages to the mixer
- `src/message.rs`, `src/transition.rs`: what happens, and what comes of it
- `src/workspace.rs`: the workspace: creating it, keeping its windows in line with the modules,
  handling messages, and working out what to show
- `src/scene.rs`, `src/window.rs`, `src/panels.rs`, `src/connections.rs`: what is shown
- `src/laws.rs`: what holds of the workspace as a whole
- `src/order.rs`, `src/text.rs`, `src/counter.rs`: keys in order, numbers as text, layers
- `src/node.rs`, `src/window_ref.rs`: references to page elements, and all that is trusted of yew

Frequencies are carried as the bits of IEEE 754 doubles.
