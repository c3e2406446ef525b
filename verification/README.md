# yaolist

The decision logic of the YaoList file server, verified with Verus.

`src/` holds what the server decides, each function with a contract that
states its result: path cleaning and confinement to a user's root, mount
selection and load balancing, directory listings (merging, hiding, sorting,
paging), uploads, downloads and byte ranges, direct links and shares, per-path
settings (passwords, readme, header, hiding), archive listing from a ZIP
central directory, accounts (login, registration, passwords, two-step
verification), notifications, site settings and backups. Laws that span
several functions, such as the confinement of joined paths, the read-back of
written settings, or the order and content of sorted listings, are stated as
public proof functions next to the functions they speak of.

Calls into outside crates (`chrono`, `bcrypt`, `rand`, `totp-rs`, `serde_json`,
the hash and encoding crates) stand behind small trusted wrappers whose
contracts say what those crates do.

`app/` holds what the library leaves out: reading and writing `config.json`,
the process-wide configuration, and the sizes and speeds shown to people,
which need floating point.

`tests/` runs the library on concrete values.
