# sis_kernel

Verified core of the SIS kernel's drivers and window system and of its
validation harness, written in Verus.

- `src/` is the library. Every function carries a `requires`/`ensures`
  contract, and Verus proves all of them but four trusted wrappers around
  std, whose contracts are believed: `duration_as_nanos`
  (`Duration::as_nanos`) and `duration_from_secs` (`Duration::from_secs`) in
  `duration`, `char_is_numeric` (`char::is_numeric`) in `kernel_interface`,
  and `string_from_chars` (collecting `char`s into a `String`) in `scan`.
  The laws of the library (what operations keep, what one call undoes) are
  public proof functions beside the code they speak of.
  - Kernel side: `virtqueue`, `console`, `console_queue` (VirtIO rings and the
    console's control plane), `fdt` (device-tree parsing), `graphics`,
    `window`, `window_manager`, `window_demo`, `window_selftest`, `draw`
    (windows, focus, layouts, drawing commands and the window self-test),
    `voice`.
  - Harness side: `consensus`, `replication`, `partition`, `fault_injection`
    (Byzantine fault tolerance), `mock_npu` (the simulated NPU), `harness`,
    `kernel_interface`, `metrics`, `scan`, `serial_log`, `text`, `duration`
    (reading the kernel's shell output), `phase_checks` and the `phase*`
    modules (the judgements of the phase test groups), `validation`,
    `validation_run` (the steps of a full validation run),
    `formal`, `report`, `ext4_stress`.
- `app/` is ordinary Rust around the library: the async runners that talk to
  QEMU over the serial socket, floating-point statistics and scores, the
  serialisable record types, and the parts that drive a screen.
- `tests/` exercises the library from outside.
