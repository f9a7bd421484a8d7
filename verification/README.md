# Alexandria

A local index of digital assets: it scans folders, classifies files, groups
episodes, movies and collections by name, keeps notes and tags, and can
reorganize files on disk by templates, with space estimates, checksums and
rollback.

`src/` is the verified core, checked with Verus:

- `text`, `paths`: strings and '/'-separated paths as character sequences.
- `models`, `error`: the records of the index and the errors.
- `groups::matcher`: series, movie and collection detection by name.
- `extractors`: classification by extension, which reader a file gets,
  reading ffprobe reports, PDF documents and ZIP listings from their bytes.
- `reorganizer`: templates, planning, space estimation, checksums, the
  step-by-step decisions of applying and rolling back a plan, and a model of
  the disk and index on which rollback is proved to undo apply.
- `query`: the SQL text and parameters of the listings.
- `system::storage`: which disk holds a path.
- `config`, `cli`, `api`, `scanner`: the decisions of the program's
  configuration, commands, web API and scans.

`app/` is the program around it: the command line, the SQLite database, the
web server, and the work on files and processes.
