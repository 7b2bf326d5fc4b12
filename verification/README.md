# auto_prompt

Decides how a chain of agent threads goes on. When a thread stops, a model is
asked whether there is work left; its answer, the plans in the project and the
thread's last message decide whether a follow-up prompt is sent, and where to.

- `src/` is the decision logic, a Verus library: every function states what it
  returns, and the laws that hold of several functions together stand at the end
  of each module as public proof functions named `law_...`.
- `tests/` runs the library on concrete values.
- `app/` performs what the library decides: settings and plan files, logs, model
  calls, timers, and the floating-point classifier.

The library relies, without proof, on `serde_json` for reading and quoting JSON
and on two functions of the standard library. Each of these is a function with a
doc comment that says what is relied on, in `src/json.rs` and `src/text.rs`.
