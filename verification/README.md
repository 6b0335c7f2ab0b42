# trautonium

The fixed-point audio engine of a pressure-played monophonic synthesizer for the ESP32,
verified with Verus.

- `src/` is the library: the wavetables, the oscillator, LFO and envelope, the voice's
  sample path, the delay and the reverb, and the packing of samples into the DAC stream.
  Each function states what it computes over a model of its state, and the modules hold
  proofs of the properties that span calls (the envelope's attack and release, the echo
  of the delay line, the period of the reverb's lines, the shape of the tables).
- `app/` is the firmware around it: the panel (ADC multiplexer and switches), the
  floating-point control mapping, pitch and filter, and the two-core main loop.
- `tests/` run the library on concrete values.
