# infrastore

The logic of a time-series store's two outer layers, proved with Verus:

- the Parquet exchange format: how series become partitions of two files each, a file of values
  and a file of series, and how those files become series again;
- the C boundary: what each exported call makes of its arguments, and what it hands back.

`src/` is the library. Its contracts speak of sequences, maps and integers; what chrono,
serde_json and the standard library do behind a few small functions is stated there and not
proved. `app/` holds what does I/O: Arrow arrays, Parquet files and the exported functions
themselves, over a store that is plugged in through the traits in `app/store.rs`. `tests/` runs
the library.

## Where to start

| Module | What it holds |
| --- | --- |
| `instant`, `text`, `json` | instants, texts and documents |
| `kinds`, `array`, `series`, `catalog`, `features` | the data model |
| `partition`, `filename` | which series share a partition, and what it is called |
| `table`, `schema`, `footer`, `columns` | the layout of the two files |
| `rows`, `values`, `series_file`, `plan`, `partition_tables` | writing a partition |
| `batch`, `groups`, `series_reader`, `halves`, `files` | reading its files |
| `merge`, `assemble`, `order`, `cube` | joining the two files into series |
| `roundtrip`, `read_back`, `tables_read_back`, `reorder` | what was written is what is read, in whatever order |
| `single_export`, `single_import` | one series in one file |
| `status`, `arguments`, `requests`, `filters` | arguments of the C boundary |
| `calls`, `probe`, `results`, `listing` | its calls and their answers |
