# controller_rs

Control software for a 16-board ADC / SNAP2 correlator front end.

- `src/` is the verified library (Verus):
  - `utils`: little-endian byte encodings, `to_u8_slice`, string comparison;
  - `msg::adc_msg`, `msg::snap2_msg`: the messages of the ADC and SNAP2 boards and
    their exact byte layouts;
  - `net`: cutting a message into raw Ethernet frames, and building the UDP frame
    for the SNAP2 board (through etherparse);
  - `board_cfg`: building the front-end configuration from the values of a
    configuration document, and the command sequences that configure the boards;
  - `fft`: classifying and reassembling the frames of an FFT data upload.
- `app/` is the command-line program: YAML reading (serde_yaml), the layer-2 channel
  (pnet), pacing and printing.
- `tests/` exercise the library on concrete values.
