# adapter_macos

A macOS automation adapter: Safari (tabs, page actions, JavaScript evaluation,
scrolling, waiting, ChatGPT / Gemini / Grok conversations, X and Threads feeds,
page observation), Apple Reminders, Stickies, Notes and notifications,
screenshots and window listings, the Shortcuts action compiler (actions to the
property-list records the Shortcuts app stores, and back), the Shortcuts
library database, and the per-target scan state that paces repeated scans.

The library in `src/` is written in Verus. Every operation that talks to the
machine does so through a small host trait (`SafariHost`, `RemindersHost`,
`StickiesHost`, `ScreenshotHost`, `ShortcutsDb`); the library builds the
scripts and statements, decides what to do with each reply, and keeps ghost
records of what it asked and was answered: the scripts run and their outcomes
(with each rate-limited attempt and pause), the database statements and
queries with their parameters and answers, the clock readings and replies of
the answer waits, the clock readings of the waits for a send button, the files checked, read and written, and the screenshot
runs with their reports, the scroll snapshots read and the cache directory
looks. The contracts state each result over those records. Calls into outside
crates (serde_json, plist, sha2, base64, chrono, urlencoding, uuid) go through
a few trusted wrappers whose contracts name or state their results.

Shortcut action records are held as `PlistItem` values (texts, integers,
booleans, dictionaries); one wrapper writes them as a binary property list
and one reads them back. `shortcuts::round_trip` proves that decompiling a
compiled payload gives the compiled actions back, for specs whose actions all
name their outputs (`names_outputs_seq`) and whose output-recording actions
were given distinct UUIDs (`all_different(taken_seq(..))`). The UUIDs come
from a random generator of which nothing is stated, so that second premise
stays a premise of the contract of `compile_actions` rather than a proved
fact; an action without an output name reads back with its default one.

The field codec that the Safari scripts use to print records is proved
against the AppleScript handler as written: decoding undoes the handler's
five replacements for every text (`safari::script`).

`app/` implements the host traits on macOS (`osascript`, `screencapture`,
`textutil`, EventKit, SQLite, files) and holds the process-wide Safari session
lock. `tests/` exercises the library.
