# git_ai_commit_core

The logic of `git-ai-commit`, a Git subcommand that writes commit messages for
staged changes with a language model, as a library verified with Verus.

- `src/` is the library. Every function in it has a contract that Verus proves:
  reading `git diff` output and sampling it to a token or byte budget, building the
  prompt, resolving the configuration from the environment, `git config` and a file,
  choosing between the responses and chat-completions endpoints and falling back
  from one to the other, cutting server-sent event streams into payloads, reading
  the providers' answers, rendering a streamed answer with its thinking sections,
  cleaning and checking the message, and the steps of `git ai-commit` itself.
  `src/laws.rs` states properties that relate several functions.
- The calls into other crates (`url` parsing through `reqwest`, `serde_json`
  string quoting, the `o200k_base` tokenizer of `tiktoken-rs`) stand behind small
  wrappers whose contracts are trusted; each says what it claims in its doc comment.
- `app/` is the program around the library: command line, terminal, files, `git`
  and HTTP. It asks the library what to do and hands back what happened.
- `tests/` runs the library on concrete values.

The default diff budget is 32000 tokens (the value the configuration code and its
tests use); a detected model context raises or lowers it within 32000 to 64000, and
the message itself gets an output budget of 4096 tokens. Secret redaction needs an
outside redactor that this build does not have: `app/` warns when
`ai.commit.redactSecrets` is on and sends the diff unredacted.
