# iot_driver

A verified library for configuring MonsGeek and Akko keyboards: the device protocol, key
bindings, magnetic triggers, lights, macros, animations, the product registry, the depth
stream, and the terminal interface's state.

Nothing in the library talks to a device. An operation is a function of the replies that
are in so far: it says which request comes next, or what the operation came to
(`exchange::Step`). Its contract states both for every sequence of replies, so whoever owns
the link only performs requests and hands the replies back.

| Modules | Subject |
| --- | --- |
| `protocol`, `exchange`, `error` | requests, replies, and how operations are built of them |
| `keyboard`, `bindings`, `macros`, `triggers`, `magnetism`, `lights`, `led`, `patches` | the operations of a keyboard |
| `settings`, `key_action`, `key_ref`, `keymap` | what is read and written |
| `device_db`, `registry`, `select`, `connect` | products, and opening a device |
| `depth` | the depth stream over a socket |
| `commands`, `spinner` | command line and editing logic |
| `tui_state`, `tui_flow`, `tui_input`, `tui_view` | the terminal interface |
| `text`, `bits` | decimal and hexadecimal text, bytes and words |

Codes that differ between protocol families, and the tables of key names, are parameters
(`protocol::CommandTable`, `keymap::KeyTables`).

`app/` holds what surrounds the library: links, sockets, the terminal, and millimetres as
floating point numbers.
