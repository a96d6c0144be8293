# rbx-studio-mcp

A Model Context Protocol server for Roblox Studio. A plugin in every Studio DataModel long-polls this
server over HTTP; MCP clients call tools over standard input and output; the server routes each
command to the right DataModel of the right Studio window and the plugin's answer back to its caller.

## Layout

- `src/` is the router itself, verified with [Verus](https://github.com/verus-lang/verus).
  - `state`, `polling`, `runs`, `proxy`: the queue, deliveries that are acknowledged or repeated, the
    callers that wait, and the servers that forward to the one that owns the port.
  - `instances`, `routing`, `server`, `role`: the Studio windows and which of them a command goes to.
  - `tools`, `timing`, `seconds`: what the tools ask for and how long they may take.
  - `screenshot`, `picture`, `encoding`, `os_capture`, `os_window`: screenshots and Studio's window.
  - `binary64`, `text`: binary64 arithmetic on bit patterns, and text.
  - `laws`: what holds of several operations together, such as that each poller receives its commands
    in order, that lost deliveries are repeated and acknowledged ones are not, and that an answer
    reaches its caller.
  - `deliveries`: what holds of whole runs: a command that is never answered is delivered at most five
    times, seconds apart.
- `app/` is the program around it: MCP, HTTP, JSON, the clock and the operating system's windows.
- `tests/` exercises the library from outside.

Time enters the library as a count of nanoseconds, ids as 128-bit numbers, and numbers with a fraction
as binary64 bit patterns. What the library takes from other crates on trust is marked
`external_body`, with a comment that says what is claimed of the call.
