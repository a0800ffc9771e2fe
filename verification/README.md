# GregTech Lite installer

Fetches the nightly GregTech Lite modpack and resumes a download that was
interrupted.

`src/` is the verified library. It makes the decisions of an installation and
touches neither disk nor network; what it is told of them, `app/` looks up:

- `config`: the user's request, the proxy, the address of the modpack
- `paths`: the target and the incomplete file beside it
- `response`: what an HTTP response says about the size of the file
- `download`: one download as a state machine
- `install`: a whole installation around it
- `work`: the pieces of outside work, and what can come of them
- `report`, `error`, `size`, `text`: what the user reads
- `disk`: a model of the disk and the server, and what a download does to them
- `aftermath`: what a download leaves on the disk, whatever the server sends
- `told`: what the user is told in the course of it
- `laws`: what holds of numbers, addresses, names and installations

`app/` is the desktop program: a Tauri command, the HTTP client and the files.
`tests/` runs the library, with a disk and a server in memory.
