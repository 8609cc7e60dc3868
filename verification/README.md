# mcp-stdio-rs

A minimal MCP client for servers that are started as a child process and speak
newline-delimited JSON-RPC over stdio. What decides and computes is a library
verified with Verus. The pipes, the process and the command line stand around it and
are not verified, and neither is the step from the JSON of a tool list to its fields,
which `serde` derives in `app/wire.rs`.

## The library, `src/`

- `client`: a session. Which requests are out and under which `id`, the lines that
  are to be written, what an answer means.
- `pending`: the requests that wait, and what a line of the server's output does to
  them.
- `lifecycle`: how a server is started and stopped, as two state machines.
- `rpc`, `response`: JSON-RPC messages, written one to a line, and read.
- `tools`, `content`, `base64`: tools, calls, and the content that a call returns.
- `command`: command lines, split into a program and its arguments.
- `report`: tools and results as lines of text.
- `json`, `text`, `error`: documents, text and failures.

The library does no I/O. A program hands it lines and events and carries out what
it returns; `T` in `McpStdioClient<T>` is whatever the program uses to tell a
caller the answer.

Contracts speak of mathematical models: a JSON document is a `JsonView`, the
requests that wait are a `Map`, text is a `Seq<char>`. What holds across functions
is proved in the functions whose names begin with `law_`.

JSON is parsed and printed by `serde_json`. What is trusted of it stands in
`src/json.rs`, each item with the function that it speaks of. A number with a fraction
may change in the last place when it is written and read again. What is said of reading
a message back therefore leaves open which fraction is read; everything else in the
message is as it was written. Only a message that nests deeper than the parser goes, or
that holds a number with an exponent, may be one that cannot be read again.

## The program, `app/`

`mcp-stdio-cli` lists the tools of a server or calls one:

    mcp-stdio-cli list-tools --cmd "ssh ultra mnemos-mcp"
    mcp-stdio-cli call --cmd "ssh ultra mnemos-mcp" --name search --args '{"query":"x"}'

Programs that embed the client use `StdioClient` of `app/lib.rs`:

    let c = StdioClient::spawn("ssh", &["ultra", "mnemos-mcp"], &[]).await?;
    let r = c.call_tool("search_memories", args).await?;
    c.shutdown().await?;

## Compatibility

MCP protocol version `2024-11-05`.
