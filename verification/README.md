# aerie

The verified core of Aerie, a tool for building and running AI workflows as
node graphs. The library holds the decisions of the editor and of the
headless runner, each with a contract proved by Verus; `app/` holds the I/O
around them.

- `src/text.rs`: character-level string operations (split, trim, prefixes,
  `::` paths).
- `src/config.rs`: model roles, model profiles and user preferences.
- `src/persistent.rs`: the persistent collections of the `im` crate, behind
  contracts over their contents.
- `src/state.rs`: the UI state kept on disk: recent models, which fields
  changed, and their stored form; what a change writes reads back as the
  changed state.
- `src/tools.rs`: tool providers and `provider/tool` selection patterns.
- `src/image.rs`: image data URLs (reading and writing them round-trips),
  where an image comes from, image formats, and shrinking and re-encoding
  images through the `image` crate.
- `src/nodes.rs`: workflow nodes by kind, and the image nodes.
- `src/events.rs`: editor events and their priority.
- `src/scope.rs`: models from the command line, settings file, profile and
  the user a request is for.
- `src/exec.rs`: runner arguments, the first prompt, the workflow source and
  the chain of runs.
- `src/service.rs`: replies of the HTTP and tool-call services, and the
  prompt and images a tool call runs with.
- `src/controls.rs`: the graph editor's controls.
- `src/agent.rs`: the structured-submission tool and `provider/model` names.
- `app/`: command-line arguments, the settings file, the on-disk state store
  and reading image bytes from disk or the network.
