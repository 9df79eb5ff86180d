# bast3st

Checks submissions of block-based programs against a specification of tests.
A specification holds entities (criteria, actions and values that refer to
each other by id), categories of main tests with alternative tests, and hooks
that run before and after tests. A test runs the submitted project, and its
criterion is then evaluated on the data of that run.

## Layout

- `src/` is the library, verified with Verus.
  - `spec/` holds the model of specifications and runtime values (`values`,
    `deep`, `entities`, `runtime`, `structure`, `text`, `numbers`), the
    evaluation of one entity (`eval`) and the laws it obeys (`eval_laws`).
  - `evaluation/` drives an evaluation step by step (`single_evaluation`),
    serves data to it (`selectable`, `effects`), decides how tests, hooks
    and alternative tests proceed (`process`), counts blocks (`blockcount`)
    and chooses the ids of initial variables and lists (`initial_ids`).
  - `messages`, `features`, `catchable` and `log_pfx` hold the messages that
    tests send, the capabilities of an evaluation, the kinds of catchable
    errors, and log prefixes.
- `app/` is the part that runs the interpreter, reads specification files,
  awaits evaluations and does floating-point arithmetic; every decision it
  acts on comes from the library.
- `tests/` exercises the library on concrete values.

An evaluation never computes with floating-point numbers or talks to the
network itself: it asks (`Step::Ask`) and the caller answers
(`provide_answer`). Its contracts state the result for every answer.
