# file-guard

Per-process access control for credential files. For each watched file the real
contents live in a backing store, and the original path is served through an
interception layer. On every open the calling process is identified and the
policy is consulted, in the direction of the access: persistent rules first,
pinned to the program's contents, then grants for this exact process instance,
then the user, and without an answer the configured default, which is to deny.

The decisions are a library, written and verified with Verus. `app/` is the
program around it: argument and configuration parsing, the kernel interfaces,
sockets, files and logs.

| Module | What is decided there |
| --- | --- |
| `policy::rule`, `policy::session` | directions, rules, decisions, session grants |
| `policy::engine`, `policy::access` | evaluating an access, asking, remembering the answer |
| `prompt` | the exchange with the user's agent |
| `fuse_fs::credential_fs` | handles on the guarded file: open, read, write, truncate, persist |
| `fuse_fs::fuse_interceptor` | leftover mounts, preparing and undoing mountpoints, start and stop |
| `es` | the Endpoint Security backend |
| `process` | identifying processes |
| `config`, `toml_doc` | settings, where files are, changing the configuration file |
| `control`, `logging`, `cli` | reports, the audit log, the command line |
| `path`, `text`, `time` | the values that the rest works on |

Properties that hold of several operations together are stated as proof
functions whose names begin with `law_`, next to the operations that they are
about.
