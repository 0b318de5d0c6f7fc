# mcpi — MCP Inspector

An interactive command-line inspector for Model Context Protocol servers, reached over stdio
(a child process) or HTTP (JSON answers or server-sent events).

The library in `src/` holds what the inspector decides, each function with a contract that
Verus proves:

- `json`, `protocol`: the JSON model, its compact text, and the JSON-RPC and MCP records read
  from it.
- `client`: requests and their parameters, routing of incoming messages (responses, server
  requests answered from the capability handlers, notifications), request errors.
- `commands`: every REPL command as a step from the session's state to outputs and an action.
- `display`: the lines and tables that show tools, resources, prompts, results and
  notifications.
- `repl`: tab completion, the prompt's history and incoming notifications.
- `transport`: taking complete events off a server-sent event stream.
- `startup`: command-line flags and the command run on start.
- `config`, `table`, `text`: the session, an insertion-ordered string-keyed table, text helpers.

`app/main.rs` is the program around it: flags, processes, HTTP, the terminal, files, and the
asynchronous client that carries out the library's actions.
