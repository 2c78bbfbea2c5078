# glowstone

The user interface of a stage-lighting visualiser. What it decides, lists,
parses and words is a library that Verus proves; what it draws, stores and
computes in floating point stands around the library.

## The library, `src/`

| module | what it holds |
| --- | --- |
| `shortcuts` | the command registry, the keymaps, the user's overrides, the rows in effect, conflicts, and which actions a frame's keys fire |
| `tree` | the outliner: chips, rows, clicks, renaming, guide lines |
| `selection`, `scene` | what is selected, and what of the scene the logic reads |
| `viewport` | a frame of the viewport: typed numbers, transforms, arrays of copies, picking, the marquee, the ruler, aiming, the overlays' texts |
| `dmx`, `fixture_manager` | the universe grid, the connection panel, the fixture table and its bulk patching |
| `windows` | the palette, the add menu, quick select, the patch dialogs, preferences and the keymap editor, the cheat sheet, the profile texts |
| `workspaces`, `project`, `render`, `share`, `ui` | named layouts, the project file's frame and the recent list, the render tab, the online library, the start |
| `pie`, `tools`, `xform`, `theme` | pie menus, tools, transform options, design tokens |
| `text`, `paths` | texts and paths |

Every public function states what it returns or changes. Laws that span several
functions are public proof functions beside them.

A few functions are trusted: each calls one outside function and says what the
caller may rely on. They stand in `text`, `paths`, `shortcuts::keymaps`,
`project`, `render` and `ui`.

## Around it

- `app/` draws with egui, reads and writes files, and holds positions, rays and
  colours.
- `tests/` runs the library.
