# s2_mcp

A verified core for an MCP server over S2 durable streams, written in Verus.

**The JavaScript runtime of Code Mode is not part of this build.** Running
TypeScript programs needs a V8 runtime, a TypeScript parser and transpiler,
and the runtime script that installs the `S2` namespace; none of them is
available here. The `execute` tool therefore checks a program (its size, the
call and output limits, the argument depth) and then answers every valid
program with "the JavaScript runtime is not available in this build". The
rejection of static and dynamic imports and the sandbox that denies host
access belong to that runtime and are not implemented either. Tools mode,
the Code Mode `search` tool and the generated TypeScript API work in full.

## Layout

- `src/` is the verified library: the access policy, the operation catalog,
  the TypeScript API generated from the tools' JSON Schemas and its search
  index, the bounded output envelopes, the call ledger, configuration
  loading, and the checks on reads, appends, metrics and resource
  configurations. Every function there carries a contract that Verus proves.
- `app/` is the program around it: command-line handling, the MCP server,
  the S2 client calls, serialization, and the executor processes.
- `tests/` exercises the library on concrete values.
