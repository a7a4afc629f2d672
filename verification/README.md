# minz-core

The hardware-free core of a sensorless brushless motor controller, written in
Verus: the functions in `src/` carry contracts that Verus proves, apart from
the trusted methods named below.

Two controllers share the crate.

- The closed loop. `zc` turns comparator edges into accepted zero-crosses,
  `estimator` keeps the sector interval, `window` closes each float window and
  packages its record, `timing` computes gates, delays and slews, `guards`
  decides every protective stop, `mode` takes the bench commands, `start`
  paces a start from the rotor itself.
- The six-step drive. `am32` holds its arithmetic, parser and rings,
  `am32_loop` the pure bands of its main loop, `am32_control` and `am32_isr`
  the functions that reach hardware, through the traits of `am32_hal`.

`bus` is the way to shared atomic cells, and `cells` runs the closed loop's
machines on them. The rest serves both: telemetry frames (`wire`), the black
box (`blackbox`), bench dumps (`dump`, `a85`, `text`), the trace
(`zct_trace`), and small conversions.

## How to read the contracts

State is a plain struct, and a function states the struct it leaves behind. A
spec function with the same subject says what the new value is: `window`'s
`closed`, `zc`'s `published`, `mode`'s `stepped`. Laws that span several
functions are the public proof functions whose names start with `law_`.

A function that drives hardware states what it adds to each component's ghost
trace of calls, and to the motor bundle's log, which has the calls on all its
components in order. The black box, the critical sections, the sampler and the
loop timer have traces of their own: their order among each other and against
the motor's calls is not part of a contract. The two ends of a critical section
carry what it guards, so a contract says which change happened inside it.

## What is trusted

The machines' state can live in `portable-atomic` cells that other contexts may
write at any time. The methods of `Bus` that load, store and exchange are the
only trusted functions. Each makes one atomic access and promises that this
access, with the value that came back, joined the bus's ghost trace, and an
exchange that it took exactly when it found what it looked for. Of the values,
and of what a cell holds later, nothing is promised. Only these methods reach a
cell or write a trace, and only the firmware makes a bus for its contexts, so a
method of `cells` proves which accesses it made on the bus that it was given,
in which order, and that its answer is the machine's for the values it read.

Implementations of the `am32_hal` traits live with the firmware, and are
trusted to make the one call that each method describes.
