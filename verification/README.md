# relm_gen_widget

A verified reader for the `view!` language of relm: a tree of gtk and relm
widgets with their properties, constructor arguments, event handlers and
attributes.

- `src/` is the library, verified with Verus. `tokens` holds the token trees
  a view is made of; `pieces`, `values` and `tree` give the grammar as spec
  functions together with the functions that read it, each proved to compute
  exactly what its spec function gives, errors included; `names` makes widget
  names from a counter; `laws` proves properties of the grammar; `syntax` and
  `text` hold the calls into syn and std that are trusted.
- `app/` converts syn token trees into the library's tokens, loads a view
  that is given as the name of a file, keeps the process-wide name counter,
  and turns the widget tree into syn expressions and paths.
- `tests/` runs the library on concrete views.
