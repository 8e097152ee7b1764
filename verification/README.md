# local_agent

A local file assistant driven by a small language model served by `llama-server`:
the model is offered tools (files, search, images, PDFs, ZIP archives, the
workspace setting) and the agent runs them on the user's machine.

- `src/` is the verified library (Verus). It holds every decision of the agent:
  routing of tools per request, the state of a turn, the history budget and its
  digest, the system prompt, the correction of tool arguments, the stream of a
  completion, the workspace guard, and each tool's checks, paths and reports.
  Contracts state what each function returns; public `law_*` proof functions state
  properties that span calls.
- `tests/` runs the library on concrete values.
- `app/` is a command-line program around the library: it talks to the model
  server over HTTP, runs the tools' file, image, archive and document work, and
  keeps sessions and logs on disk.

In `chat`, Ctrl-C stops the turn in progress (the model's stream and the tool
calls left); the turn is closed so that every tool call it made has an answer.
End the conversation with Ctrl-D.

Background removal runs its ONNX model with ONNX Runtime, loaded at run time from
the library that `ORT_DYLIB_PATH` names (or the system's default one).
