# spectra

A deterministic simulation of a contested electromagnetic environment:
emitters, receivers, interference, simulated jamming and deception, sensor
uncertainty and a tactical AI, all abstract and inside a virtual world.

## Layout

- `src/` — the library, verified with Verus. It is generic over the
  real-number type `R` that carries positions, powers and frequencies, and
  holds the discrete core of the simulation:
  - `model` — identifiers, the world registry, entities, emitters,
    receivers, interference lifetimes, events, observations, metrics and the
    scenario description;
  - `ai` — decision errors and their messages, the fog of war, the rule
    table and response queue of the tactical AI, the decision policy trait;
  - `ew` — the effect trait, the jamming, deception and flooding effects,
    and the manager that applies and retires them;
  - `sensors` — which receivers hear which emitters;
  - `sim` — scenario assembly and the discrete steps of a tick;
  - `experiments` — experiment counters, the mapping from decisions to
    effects, and the totals of a batch of runs;
  - `console` — the keyboard controls, the world map grid, the panel
    contents and the bounded logs of the terminal console.
- `app/` — the program around the library, with `R = f64`: the
  floating-point propagation and sensor models, the seeded random draws of
  the sensors and the AI, YAML loading and JSON export through serde, the
  experiment loop, and the ratatui console.
- `tests/` — tests of the library.

Run the console with `spectra [scenario.yaml] [seed]`.
