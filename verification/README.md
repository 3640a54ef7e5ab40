# clicker

The rules of a small hex-grid clicker game and of its probe reports, written in Verus and
proved against their contracts.

Place tiles, click them to earn experience, and spend skill points to expand the world: the
world model, selection, clicks, placements, progression, sound and particle cues, the skill-tree
buttons, hexagon rings and spirals, the probe's timeline and snapshot records, timing capture
and aggregation, the scripted-run driver and the HTML reports are verified library code.

## Layout

- `src/` — the verified library, one module per concern:
  `tile` (coordinates, world bounds, tile kinds), `world` (hexagons, placement, selection,
  clicks), `progression` (experience, levels, skill points, fill bars), `feedback` (sound,
  particle and render cues, debug toggles), `skill_ui` (skill-tree buttons), `hexmap` (cube and
  axial coordinates, rings, spirals), `snapshot`, `timeline`, `timing`, `autopilot` and `html`
  (the probe), `text` (numerals, white space).
- `tests/` — tests run against the compiled library.
- `app/` — the `clicker probe` command: process launching, files, JSON and the
  floating-point parts (statistics, layout, camera shake, deadlines).
