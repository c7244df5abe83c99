# bulletty (verified core)

The navigation, theme and dialog logic of the bulletty terminal feed reader,
written in Verus and proved against its contracts.

- `src/` — the verified library:
  - `list_state`: scroll offset and selection of a list, and the saturating
    arithmetic the navigation relies on;
  - `feedtreestate`: the feed tree (categories, feeds, Read Later), its
    rebuilding from the library, separator-skipping navigation, category
    jumps, mouse-wheel scrolling and row titles with unread counts;
  - `feedentrystate`: the entry list, its refresh protocol, navigation,
    scrolling, scrollbar measures and entry titles;
  - `theme`, `usersettings`: Base16 themes, hexadecimal color parsing and the
    theme registry (library themes override embedded ones);
  - `helpdialog`, `welcomedialog`, `input`, `instructions`: dialog key
    handling;
  - `mouse`: hit-testing; `dirs`: the application's directories;
    `text`: decimal text of counts.
- `tests/` — scenario tests, including comparisons with ratatui's own
  `ListState` and `Rect::contains`.
- `app/` — the terminal side: crossterm and ratatui conversions, drawing,
  theme files and platform directories.
