# gif_server

The core of a self-hosted GIF server, verified with Verus: tag search, uploads with a preview and a
thumbnail, shared and private GIFs, storage caps, Matrix sign-in and page cursors.

## Layout

- `src/` is the library. Every function in it, but for the wrappers named below, is verified against
  its `requires` and `ensures`. The laws that relate functions are public proof functions named
  `law_...`.
  - `config`, `error`, `models`: the configuration, what can go wrong, what is stored and answered.
  - `auth`, `middleware`: OpenID tokens, session tokens, who may see and change a GIF.
  - `storage`: decoding and resizing GIFs (`mod`, `codec`, `canvas`, `scale`), SQL (`sql`, `db`), the
    accounting of uploads (`ledger`), what the tables hold after statements (`tables`), the places of
    files (`files`).
  - `routes`, `router`: what each request does, which routes there are, their limits.
  - `text`, `number`, `base64url`: texts, numerals and Base64.
- `app/` is the server around it: HTTP, the database, files, the homeserver.
- `tests/` runs the library.

## How the parts work together

The library never touches the database, the network or the disk. Where a request alternates between
asking the database and deciding, the library gives the statement to run and takes what came of it:
`insert_gif_quota`, `replace_gif_quota`, `record_selection` and `searched` go from a step and an event
to the next step, and `app/` runs the loop.

## What is trusted

The calls into other crates stand behind small wrappers whose contracts are believed, not proved.
Each says in its doc comment which function it calls and what is claimed of it:

- `storage/codec`: reading and writing GIF (`gif`), resampling and PNG (`image`);
- `auth`: signing and checking session tokens (`jsonwebtoken`), the clock (`time`);
- `base64url`: Base64 (`base64`);
- `routes/upload`, `routes/cursor`: SHA-256 (`sha2`), hexadecimal (`hex`), UUIDs (`uuid`);
- `text`: a few functions of the standard library.
