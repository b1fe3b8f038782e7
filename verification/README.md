# replicator

Bootstraps a fleet of CE nodes as a tree. Each node that is set up receives the binaries, a
capability delegated from ours, and the commands to start, so that it can set up nodes of its own.
A delegated capability is never broader than the one it comes from: it holds no other abilities, it
loses `spawn` at the last level, and it expires no later.

`src/` is the library. It decides what is granted, what is signed, what is sent and in which order,
and Verus proves that it does so as its contracts say.

| module | what it holds |
|---|---|
| `abilities` | the abilities a child is granted |
| `caveats` | the conditions on a capability and how they are narrowed |
| `capability` | capabilities, seals and chains |
| `delegation` | what a holder signs for a child, and the child's chain |
| `trust` | laws of chains: privilege only shrinks, and what a chain entitles to at a host |
| `hexadecimal`, `node_id` | bytes and node ids in hexadecimal digits |
| `text` | `name=path` pairs and lines of words |
| `wire` | requests to a target and what its replies mean |
| `replication` | the steps of a replication onto one target |
| `conduct` | laws of whole replications, whatever they meet with |
| `seeding` | nonces and the outcome for several targets |
| `clock` | the time |

`app/` is the program around it: arguments, files, signatures and the connection to the local node.
`tests/` runs the library on concrete values.

Signatures, their verification and the encoding of chains belong to the `ce-cap` crate. The library
sees a signed capability as its fields, its id and its encoded form.
