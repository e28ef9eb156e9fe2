# diary

A terminal diary whose entries and attached files are kept encrypted with a
password (AES-128, CBC mode), and which can render the whole diary as an HTML
page.

- `src/` is the verified library: the keyboard decoding (`input`), the editing
  session (`session`), the records and how an entry is sealed (`db_ops`), the
  password check of a database and the encryption calls (`crypto`), the HTML
  page (`page`), string helpers (`text`) and the properties that relate them
  (`laws`).
- `app/` is the program around it: command-line arguments, the database file
  and its `bincode` records, the terminal and the keyboard thread.
- `tests/` runs the library on concrete values.
