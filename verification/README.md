# catboost_polars

Turns the columns of a Polars `DataFrame` into the row-major feature layout
that a CatBoost model takes: one vector of float features and one vector of
categorical features per row.

- `src/` is the verified library (Verus). It works on plain columns:
  - `decimal`: decimal rendering of integers, with its laws.
  - `rounding`: the value an integer takes as an `f32` (nearest `f32`, ties
    to even), modelled with integers, and its truncation back to `i64`.
  - `error`: the errors and their exact messages.
  - `column`: the column model, the reading of one cell as a category
    (integers in exact decimal) and of one integer cell as an `f32`.
  - `features`: float and categorical feature rows, with the first failing
    cell, in column-major order, deciding the error.
- `app/` reads a `DataFrame` into those columns with Polars, casts float
  columns to `f32`, and implements `ModelPolarsExt` for any model that offers
  `calc_model_prediction`.
- `tests/` exercises the library, including the integer model of `f32`
  rounding against the real casts.
