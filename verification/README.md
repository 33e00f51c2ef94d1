# fsd_core

The decision logic of a small autonomous-driving stack, verified with Verus.

`src/` is the verified library:

- `safety` — the safety supervisor: a state machine from boot through warmup
  to motion, with latched emergency stop and fault states, a watchdog, frame
  and timestamp sequencing, a session epoch lock and command limits. Its
  laws (shutdown and emergency-stop priority, latching until reset, motion
  only when active, warmup before motion, ...) are proof functions over the
  step function.
- `navigation` — the slow brain's decisions: BeiDou or odometry as the
  position source (HDOP and fix age), waypoint advance and the broadcast
  goal, and the gates of a visual relocalization attempt.
- `router` — classifying incoming dataflow events into driving signals, with
  exact length and finiteness checks.
- `features` — decoding a frame of sparse features from its columns (null
  slots and non-finite values reject the frame), and
  restoring a stored visual fingerprint.
- `matcher` — mutual best matching over a similarity table, the checks around
  the RANSAC estimators, and the subpixel refinement checks.
- `solver` — the checks and parameter blocks handed to the NMPC solver.
- `node` — typed metadata parameters and control frames.
- `ieee` — IEEE 754 values held as their bit patterns, with comparisons that
  follow the hardware.

Floating-point values cross into the library as bit patterns
(`F64Bits`, `F32Bits`); comparisons on them are specified bit-exactly.

`app/` holds what Verus does not check: the floating-point arithmetic (sensor
fusion, cosine similarity, descriptor interpolation, elapsed-time
subtraction, the distance to a waypoint), the clock, the acados solver calls,
the OpenCV estimators, the ONNX refinement model and the slow brain's event
handling, each calling into the library for its decisions.
