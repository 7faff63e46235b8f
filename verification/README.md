# fluux-agent

The logic of an assistant that talks over XMPP and answers with a language
model, written and proved in [Verus](https://github.com/verus-lang/verus).

The library decides: who may talk to the agent, which conversation an event
belongs to, what is stored and in which order, when a message is a command,
what the model is shown, how rounds of tools go on and end, which sessions are
started, turned away or started again, and what becomes of what could not be
delivered. Every function states what it returns on the inputs that it takes, and
Verus proves it; of what comes from the clock or by chance it states the form.
What the agent promises across several calls stands as a public
proof function beside the code it speaks of.

## Layout

- `src/` is the library.
  - `config`, `text`, `text_map`, `json`, `time`, `clock`, `ids`, `xmpp`: the
    settings, and the values that everything else speaks of.
  - `backoff`, `reconnect`: how a lost connection is taken up again.
  - `agent/`: memory, its entries and files, and what outlives a connection.
  - `actors/`: one module for each actor, each a function from state and event
    to the next state and what is to be done.
  - `llm/`: messages, tools and answers, and how two providers are spoken to.
- `app/` is the program around it: the configuration file, the disk, the
  network, the clock and the tasks.
- `tests/` run the library.

## What is trusted

A handful of calls are taken at their word, each behind one function with a
doc comment that says what is believed of it: the lower case and the letters of
Unicode, the clock, fresh identifiers, JSON strings, base64, the parts of a URL
and the hash that picks a writer of memory.
