# eoka

Browser automation over the Chrome DevTools Protocol, with stealth.

The library in `src/` holds everything that can be decided without a socket, a
process, a clock or a file. Each function states what it returns in `requires` and
`ensures` clauses, and Verus proves it. The crate in `app/` performs the input and
output: it hands the library what it read and carries out the step that it gets
back.

| Module | What it is about |
| --- | --- |
| `cdp::transport` | numbering, framing and filtering commands, and sorting what comes back |
| `cdp::connection` | the commands for a browser and for a page |
| `cdp::command` | commands, and their data as JSON |
| `cdp::pending` | who waits for which answer |
| `cdp::launch` | starting and stopping a browser |
| `cdp::http` | the short HTTP requests to a browser's debugging port |
| `cdp::discover` | finding browsers that are already running |
| `page` | scripts for a page, what its answers mean, keys, and waiting |
| `stealth` | identities, and the scripts that keep them consistent |
| `network` | a page's requests |
| `fetch` | requests made from within a page |
| `session` | cookies, and sessions to hand over to an HTTP client |
| `browser` | a browser's arguments, tabs and first commands |
| `json`, `text`, `textmap`, `decimal`, `unicode`, `encoding`, `random` | what the others build on |

A function marked `#[verifier::external_body]` calls another crate or the standard
library. Its contract is believed, and its comment says what is claimed.
Functions named `law_..` state what holds across several functions.
