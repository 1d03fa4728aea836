# koharu

The project core of Koharu, a comic translator, as a verified library.

`src/` holds what the application decides and computes: the scene graph and the
migration of older files, the layout of snapshots and history frames, the steps
of opening a project and compacting its log, the mask fill engines, the rotation
over API keys, and the answers to HTTP requests. Every function states in its
contract what it returns, and the public `law_` proof functions state what holds
across functions.

`app/` performs what the library decides: it reads, writes and locks files,
serves HTTP, asks the translation clients and keeps the time.

What is taken on trust are the calls into `postcard` (an epoch's encoding),
`indexmap` (the maps of pages and nodes), `image` (WebP files) and one
reservation of memory in the standard library. Each stands in a function of its
own whose comment says what is claimed of it.
