# gmail_attachments

Downloads the attachments of a Gmail message into a directory below the current one.
The library in `src/` decides everything and is verified with Verus; `app/` talks to the
mail service, the file system and the terminal.

- `cli`, `clap_items`: the `+download-attachments` command and the request it makes.
- `validate`: what is accepted on the command line.
- `parts`: the parts of a message and which of them are downloaded.
- `filename`: safe file names, and numbers where two parts share a name.
- `paths`, `plan`: the place of each file, and when it may be written.
- `write`: how a file is opened, and what is said when writing fails.
- `session`: the course of a download, one action and one event at a time.
- `laws`, `run`: what holds of names, plans and whole downloads.
- `files`: what a download does to the files on disk, if they are written as `write` says.
