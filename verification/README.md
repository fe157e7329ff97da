# research_bot

A research assistant for Telegram and WhatsApp. It gathers sources on a topic (web search, YouTube,
Reddit, Open Library, public-domain books), has a language model draft an academic report section by
section, holds every draft to quality gates, and delivers the report; on WhatsApp it also answers
with short briefs.

The library in `src/` decides everything and does no I/O. Each of its functions has a contract that
Verus proves. `app/` is the server around it: it talks to the services, and hands their replies to
the library.

| Modules | What they hold |
| --- | --- |
| `text`, `chars`, `trim`, `pieces`, `bytes`, `numbers`, `calendar`, `json` | texts as sequences of characters, numerals, dates and JSON values |
| `outside` | calls into other crates and the standard library, whose contracts are trusted |
| `models`, `config`, `messages`, `pages` | the data, the settings, and fixed texts |
| `outline`, `excerpt`, `sections`, `blueprint`, `quality` | notes, excerpts and sections, what a report consists of, and its quality gates |
| `sources`, `rendering`, `prompts`, `feedback` | sources, the report as text, and what a model is told |
| `model_call`, `drafting`, `report` | calls of a model, and the work on a section and on a report, step by step |
| `state`, `chat`, `bridge`, `requests` | conversations, and the requests to the services around them |

Work that alternates with calls of a service is a state in the library: it says what to ask next, and
each reply moves it on. The proof functions whose names begin with `law_` state what holds of several
functions together: that a finished report has passed the gates, that the work on it ends, that a
chat has one research at a time, that no more requests are admitted in an hour than the limit.
