# mnist_net

A small fully connected network for handwritten-digit classification.

- `src/` is the verified library: matrix shapes and row-major indexing
  (`shape`), the layer topology of a network (`topology`, `activation`),
  and the checking and assembly of the per-digit image files (`mnist`).
- `app/` holds the floating-point side built on it: matrices of `f32`,
  layers with random initialisation, the forward pass, the loss, file
  loading and saving.
- `tests/` exercises the library on concrete values.
