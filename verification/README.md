# weckpilot

The native logic of WeckPilot, an alarm clock for macOS, as a library
verified with Verus.

- `src/` is the verified library:
  - `text` handles text at the character level (trimming, `str::lines`,
    joining, substring search, decimal numbers), each function stated
    over the `Seq<char>` view.
  - `language` holds the rule that maps a language tag to German or
    English, and reads the output of `defaults read -g AppleLanguages`.
  - `menu` holds the menu bar's labels in both languages and its layout.
  - `helper` covers the wake helper: its paths in both generations, the
    check for an installation, the status report and what installing or
    removing it answers.
  - `schedule` holds the schedule record and plans a wake for a clock
    time, with chrono for the date arithmetic and the formatting.
  - `power` holds the `caffeinate` command lines and their answers.
- `tests/` runs the library on concrete values.
- `app/` is the Tauri application around it: the commands, the disk, the
  clock, the system tools and the menu.
