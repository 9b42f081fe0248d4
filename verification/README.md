# falling_sand

A falling-sand simulation for the terminal: sand piles up, water flows, fire
spreads, wood burns.

The world and its rules are a verified library (`src/`):

- `material`: the materials and their constants (density, terminal velocity,
  and friction and bounce in exact hundredths);
- `particle`: a cell's content, a material with its motion carried as the bit
  patterns of its floating-point components;
- `model`: the grid, indexing, moving and swapping cells, resizing with the
  content centred, placing spawned particles, and message handling;
- `reaction`: fire setting wood alight, and water putting out fire and
  evaporating;
- `census`: how the number of cells of each material may change;
- `anchor`: where spawners sit on the grid;
- `motion`: the decisions of a particle's walk through the grid during one
  time step (moving, sinking through lighter particles, hitting walls and
  blocking particles, sliding when at rest).

The terminal program (`app/`) holds what is floating point, random or I/O:
the spawners, the velocity and drag integration, the collision response, and
the drawing with ratatui. Press `q` to quit.
