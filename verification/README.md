# kong

kong keeps the dependencies of Python, Node.js and Rust projects, and the
Homebrew bottles they need, once on disk: in a store that all projects share. A
project sees an ordinary `.venv`, `node_modules` and `.cargo`, made of links into
the store.

The decisions that kong takes are a library, `src/`, written in Verus: which
versions a requirement admits, which wheel fits an interpreter, which packages a
lock file asks for, where a package goes in the store, which steps make an
environment, in which order two environments are exchanged, and what may be
removed again. Each function has a contract, and the laws that hold across
functions stand beside them as proof functions. The library does not touch the
machine it runs on. It is told what is there, and it returns what is to be done.

The program, `app/`, reads files, asks registries, runs commands and carries out
the steps.

## Layout

| Module | What it holds |
|--------|---------------|
| `text`, `chars`, `unicode`, `paths` | texts and paths, as models and as code |
| `doc` | JSON and TOML documents |
| `config` | the content of `kong.rules`, and how it is put together |
| `python` | versions and specifiers, markers, wheels, manifests, the search for packages, runtimes, environments |
| `node` | manifests and lock files, platforms, runtimes, `node_modules` |
| `rust_eco` | `Cargo.lock`, toolchains, the registry for cargo |
| `brew` | Brewfiles, bottles, the search for formulae |
| `actions`, `link`, `extract`, `store`, `download` | steps on the file system, archives, the store |
| `runner`, `service`, `migrate`, `cli` | scripts, services, taking projects over and letting them go, the command line |

Where the library calls another crate (`serde_json`, `toml`, `cargo-lock`,
`sha2`, `hex`) or a part of the standard library that has no contract, the call
stands in a small function of its own whose contract is trusted; its comment
says what is claimed.
