# sysdc

SysDC is a small language for describing the design of a software system:
units made of data and modules, modules made of functions and procedures whose
bodies say what they spawn, modify and affect. This crate reads such
descriptions, checks them into a system whose every type is resolved, and
offers tools on checked systems. Every function of the library is verified
with Verus against its contract, except one small wrapper of `String::push`
(in `src/text.rs`), whose contract is trusted.

Layout:

- `src/text.rs`: splitting and joining text, with the lemmas they need.
- `src/lang`: the language: names, types, tokens, the parser, the checker
  (`check`, with the definitions it resolves names against).
- `src/compiler`, `src/tokenize`: a smaller dialect of the language, and a
  simple tokenizer for another one.
- `src/plugin`: where programs come from and where systems go, chosen by name.
- `src/cli`, `src/command`: what the command line decides: splitting a line,
  choosing a request, the state of the interactive mode.
- `src/tool`: listing and finding functions, advice on the design (what could
  be split or merged), and the flow of a system as a graph.
- `app/`: the `sysdc` program: argument parsing, files, the terminal, and the
  serialized forms of a system (MessagePack and JSON).
- `tests/`: tests of the library.
