# guvnuh

Control logic of the Guv'nuh micro-grid governor (STM32H753 firmware), written
in Verus and proved against its contracts.

- `src/` — the verified library: the operating state machine and safety
  supervisor (`control`), the command queue (`queue`, over `heapless::Deque`),
  the ramp and calibration schedules, setpoint profiles, the ordered load bank,
  COBS frame assembly and the link handshake, ADS131M04 register and frame
  encoding, encoder and telemetry timing, and the per-state WCET table.
  Each module ends with the laws it proves.
- `tests/` — executable tests of the library.
- `app/` — the firmware around it: board setup and drivers, the postcard/COBS
  wire types, and the floating-point arithmetic (PID, ramp values, calibration
  fit, ADC scaling, prime movers) that carries out the library's decisions.
