# parakeet_server

An OpenAI-compatible speech-to-text server. `src/` holds its rules, verified with
Verus; `app/` holds the program around them: the command line, HTTP, temporary
files, audio decoding and the models of `parakeet-rs`.

| Module | What it decides |
|--------|-----------------|
| `auth` | who may call the server |
| `form` | what is kept of a multipart form, and what it amounts to |
| `media` | the suffix of the temporary file for an upload |
| `exchange` | a request from its headers to its answer, step by step |
| `model` | how a model is run, and how it is listed |
| `cut`, `chunked`, `streaming` | how audio is cut up for a model and its results are put together |
| `transcript` | pieces, tokens and transcripts |
| `reply` | what is answered in which format |
| `error` | how a request is refused |
| `startup` | what is logged and listened on at the start |
| `text` | white space, decimal numbers and other text helpers |
| `laws` | what holds of every request |

Models report times as floating-point numbers. The verified part keeps them as
bit patterns beside the place of the piece of audio that they count from; the
program adds the two when it writes an answer.

Where the platform decides how a file name is read (a backslash, a drive letter
or a leading double slash) and the name does not end in an extension that every
platform sees, the suffix of the temporary file is only known to be some part of
the name behind a dot, or `.wav`.
