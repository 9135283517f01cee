# rust_pose_1_rust_only

A pose pipeline (mock estimator, camera capture, YOLO pose decoding, overlay
and NDJSON output) whose integer logic is a library verified with Verus.

- `src/` — the verified library:
  - `clock` — wall-clock milliseconds and monotonic readings;
  - `metrics` — `FpsWindow`, which closes a window of frames every `window_size` ticks;
  - `joints` — keypoint lookup by COCO index and the right-arm selection;
  - `skeleton` — the bones, lines and points the overlay draws, and the quit key;
  - `layout` — the network output's layout, cell addressing, the kept
    prediction and the letterbox padding;
  - `camera` — the description of a captured frame;
  - `pipeline` — `PoseFrame`, `build_frame` and the mock estimator's fixed parts;
  - `run` — report and stop rules of the main loop.
- `app/` — the binary: command line, floating-point geometry, JSON output, and
  the OpenCV capture, inference and drawing code, written under
  `cfg(feature = "camera")`. This package declares no `camera` feature, so
  that code is not built: the binary runs the mock pipeline, and a camera
  request reports that the feature is missing.
- `tests/` — tests of the library.
