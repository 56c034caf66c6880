# knocks

The judge of a programming exercise site: it takes a submission in one of seven languages,
runs it in a sandbox of its own, and says whether it passed.

Everything that decides something is in `src/` and is verified with Verus. `app/` is the HTTP
endpoint around it: it talks to the sandbox service and to Docker, and asks the library what to
do next.

| Module | What it holds |
| --- | --- |
| `language` | the languages and what is particular to each |
| `contract` | requests, responses, how a run is judged, and what is shown of its output |
| `runner` | the script that runs a submission, and reading what it reports |
| `framing` | that a report is read back as it was written, and cannot be forged or cut short |
| `sandbox` | what is sent to the sandbox service, and what its answers mean |
| `execute` | the steps from a request to its answer |
| `docker` | running a batch of submissions in one local container |
| `fixtures` | sample submissions for every language |
| `encoding` | base64 and hexadecimal |
| `text` | what the usual operations on text mean, and computing them |
| `laws` | what holds of the library as a whole |

Two outside functions are trusted: `String::push` (`text`) and `getrandom::getrandom`
(`execute`).
