# ltbpf

A bootstrap (sequential importance resampling) particle filter.

- `src/` is the verified library: the particle buffers a filter borrows and the
  operations of a filter step on them (propagation, buffered and streaming
  resampling gathers, carrying the propagated cloud forward), the buffer-length
  rules, the step errors, the discrete MAP estimate, and the comparisons of
  weights, read as their IEEE 754 binary32 bit patterns.
- `app/` is the floating-point side: the weights, their normalization, the
  effective sample size, the weighted mean, and the calls into the linear-time
  resampler `ltsis`.
- `tests/` runs the library on concrete values.
