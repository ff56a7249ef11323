# chatatui

A terminal UI for chatting with OpenAI-compatible APIs, with tools of servers that speak the Model
Context Protocol (MCP). What the client does is a library written and proved in Verus; the terminal,
the network, the clipboard and the configuration file are the program around it.

## Layout

- `src/` is the library.
  - `text`, `json`, `json_text`, `http`: strings, JSON values and requests, as plain values.
  - `config`, `client`, `chat`, `mcp`: the configuration, the chat server, its replies, and the tool
    servers.
  - `app`, `steps`, `state`, `run`: the state of the client, its steps as functions of the state's
    view, and the functions that take them on keys and events.
  - `commands`, `naming`, `ui`: the commands, the name of the server, and what the screen shows.
  - `laws`: what holds of the client as a whole.
- `app/` is the program: it hands keys and replies to the library and carries out the effects that
  the library answers with.
- `tests/` runs the library on concrete values.

## Configuration

`config.toml` in the configuration directory of the user:

```toml
api_url = "http://localhost:8000"
default_model = "gpt-3.5-turbo"
api_key = "your-api-key"

[[mcp_servers]]
name = "example-server"
url = "http://localhost:3000"
api_key = "optional-key"
```

`--url` and `--model` come before the file.

## Usage

- **Enter**: send the message, or take the selection
- **Ctrl+C**: leave
- **Up/Down**: scroll the chat, or move in a menu
- **Page Up/Down**: switch threads
- **Tab**: complete a command
- **/**: show the commands `/new [name]`, `/model`, `/mcp`, `/copy` and `/help`
- **y/n**: allow or refuse the call of a tool that the model asks for
