# zone_sniper

Zone Sniper finds price zones where a trading pair has spent time and volume,
watches live prices against them, and replays history to see how journeys
from the current price toward a zone ended.

- `src/` is the verified library (Verus): kline paging and gap filling,
  candle-range selection, zone grouping and signals, the replay of candles
  through sticky zones, the step logic of historical journeys, the
  recalculation triggers, the engine's work queue, the keyboard shortcuts,
  cache checks and the pair list. Public proof functions (`lemma_*`) state
  the laws that hold across calls.
- `tests/` exercises the library on concrete values.
- `app/` is the desktop program around it: command line, exchange and cache
  I/O, the live price stream, the floating-point zone scoring and journey
  statistics, the worker thread and the user interface.
