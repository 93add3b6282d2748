# xmip-core-runtime

The Xmip Service and the Host Services it supervises: configuration, the
execution tree, startup validation, host planning, the capability and Module
registries, and the paths a Message arrives and departs by.

`src/` is the library. Everything in it decides or computes over plain values,
and is verified with Verus against the contracts it carries. The two paths are
state machines: a passage through the gates, or a departure to a destination,
says what it has to know next and goes on with the answer.

`app/` is ordinary Rust around it. It reads files and the clock, opens libraries,
holds what the process has published, puts the library's questions to the
services a deployment plugs in, and exports the C boundary a surface calls.

`tests/` runs the library.

| module | what it holds |
| --- | --- |
| `arrival`, `departure` | the gated ways in and out, and what holds of every run of them |
| `outcome`, `identity`, `message` | what the paths speak of |
| `generation`, `receive` | what begins and ends a Message generation |
| `planning`, `host`, `capability_registry`, `compatibility` | Modules and the Host Services they run in |
| `configure`, `execution_tree`, `service`, `start` | a node's configuration and its startup |
| `registration` | what the operating system is told about a service |
| `operator`, `operate`, `publication`, `curve`, `topology`, `rule`, `audit`, `wire`, `boundary` | what a surface reads, and how it crosses |
| `loaded_module`, `loaded_contract` | judging a module's library and driving its contract |
| `text`, `ordered` | the texts and the ordered names the rest is put together from |
