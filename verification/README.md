# merge_executor

The decisions of a merge executor: how splits of an index are merged into one, and how
pending deletes are applied to a split.

- `src/` holds the verified library. `partition` combines partition ids, `merge_attrs`
  works out the attributes of a merged split, `index_meta` and `meta_json` lay out the
  union of several indexes, `directory_merge` and `executor` decide what comes next, and
  `batch` is what a merge sends in the end. `merge_attrs_laws` states what holds of every
  merged split, `run_laws` what a run asks for, and `message_laws` what holds of its
  messages whatever it is told.
- `tests/` runs it.
- `app/` is the actor around it: it talks to the metastore, to tantivy's indexes on disk
  and to the packager.
