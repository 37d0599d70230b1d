# rustenphp

A small HTTP server that answers requests by running PHP in its own process.
What the server decides is a library, verified with Verus; what the system does
for it stands around the library.

## The library, `src/`

- `text`: characters, whitespace, words, lines and numerals.
- `path`: file paths as texts, by the rules of Unix or of Windows. Which rules
  hold is a setting that the program takes from the system it is built for.
- `php`: PHP string literals. No value can close its own literal. A literal
  means its value, but for carriage returns and line feeds: PHP reads those as a
  backslash and a letter.
- `request_id`: the ids of requests.
- `script`: the PHP program that answers a request.
- `http`: requests, targets, media types and responses.
- `framing`: what a reader makes of a response.
- `static_file`: which files are sent as they are.
- `server`: the command line and the settings.
- `runtime`: what the PHP engine is given, and what its status codes mean.
- `error`: what can go wrong, and how it is told.
- `connection`: the course of a connection, as a function from a state and an
  event to the next state and the next action.
- `course`: what holds of every connection, whatever the system answers.
- `link`: what the build prints to link the program with PHP.

Two functions of the standard library are trusted: `String::push`, and
`String::from_utf8_lossy`, whose result on bytes that are not UTF-8 has a name
and no further description.

## The program, `app/`

`app/` reads the environment, listens, starts threads, touches files and calls
the PHP engine. It performs the actions that `connection` asks for and hands
back what came of them.

Settings are read from `RUSTENPHP_LARAVEL_ROOT`, `RUSTENPHP_HOST` and
`RUSTENPHP_PORT`. Paths must be UTF-8. `rustenphp serve` serves; any other
arguments are run as PHP code.
