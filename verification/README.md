# Spigot

Spigot is a small desktop interface for the Pi agent harness: a conversation
buffer, a prompt, and direct access to shell commands. It talks to Pi's
Node.js SDK over a stream of JSON lines.

The crate `spigot` under `src/` is the part of Spigot whose behaviour is
stated in Verus contracts and proved:

- `pi` – how a line of input becomes a request (`!cmd` and `!!cmd` run in the
  shell), the lines sent to the bridge, what each line of the bridge means
  for the request that is running, the timeout setting and its message.
- `args` – the arguments of a tool call, as far as the transcript reads them.
- `tools` – tool kinds, one-line summaries, row labels and detail pages.
- `transcript` – the conversation buffer and how each streamed event, a
  failure, or a shell command of the user changes it.
- `render` – HTML escaping, the text shown for a finished shell command,
  thinking text, and the small choices of the interface.
- `session` – how a submitted line starts a request and how its end is
  recorded.
- `text` – characters, trimming and decimal numerals.
- `laws` – properties that span several calls, such as that streamed text,
  thinking and shell output do not depend on how they were cut into pieces.

`app/` holds what Verus does not see: the window and its components, the
Node.js process, timeouts, and the JSON encoding of the bridge's lines.
