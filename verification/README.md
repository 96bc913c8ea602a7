# gate_learner

A multilayer perceptron that learns N-input logic gates (OR and XOR), trained
with backpropagation, binary cross-entropy loss and the Adam optimizer.

- `src/` is the verified library (Verus): the truth tables of the gates
  (`dataset`), the architecture rules that turn a configuration into layers
  (`network`), the training buffers and optimizer moments shaped from those
  layers (`buffers`, for any element type), which truth table a run learns
  from and on which epochs it reports progress (`cli`), decimal text
  (`text`) and the error type (`error`).
- `app/` is the command-line program: argument parsing, the `f32` arithmetic
  of the network and the optimizer, the training loop with early stopping,
  JSON storage and PNG plotting.
- `tests/` exercises the library.
