# model-compressor

A service that takes 3D models (OBJ, STL) by upload and simplifies them
by quadric-error edge collapse in the background; clients poll the task
and download the simplified OBJ.

- `src/` is the verified library (Verus): the vertex/face incidence,
  border detection, candidate edges, the collapse decisions and the
  renumbering of the simplified mesh; the index bookkeeping of the OBJ
  and STL loaders; the OBJ text; file-name and path handling; upload
  validation; the task registry and its status reports; the HTTP error
  mapping; the settings' parsing.
- `app/` is the server around it: axum routing, multipart reading, file
  I/O, the tokio task runner, the tobj and stl_io readers, and the
  floating-point geometry (quadrics, costs, vertex placement).
- `tests/` exercises the library on concrete inputs.
