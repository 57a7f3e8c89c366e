# dataset-gen

Makes data sets of instructions and answers with a local language model. The
input is a file of JSON objects, one per line, each with an `instruction` (and
perhaps an `input`) or with a `text` that fills a template. Each item is put to
Ollama or llama.cpp, and what is answered is written as a line of JSON in the
layout of Alpaca, ShareGPT or ChatML.

- `src/` is the library, verified with Verus: reading the input, making prompts
  and requests, taking answers, writing examples, and the course of a run.
- `tests/` are its tests.
- `app/` is the command line around it: arguments, files, HTTP, processes and
  threads.

JSON is read and written by serde_json. What the library relies on there is
stated in `src/json.rs`; the few functions of std, rand and reqwest that it
relies on are stated where they are used.
