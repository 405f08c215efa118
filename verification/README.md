# url_shortener

Two small URL-shortening services and a browser page, with their logic
verified in Verus.

- `src/` is the verified library:
  - `text`: decimal formatting of integers and splitting at a separator,
    stated over `Seq<char>`.
  - `object_id`: the twelve-byte record id and its hexadecimal form.
  - `tokenizer`: tracking tokens (base64 of "<id>:<hash>", the hash being
    the decimal xxh3-64 of "<id>:<creation time>"), their generation and
    parsing; a generated token parses back to its id and hash.
  - `store`, `repository`, `handler`: the tracking-link service's records
    and the decisions of its two handlers, step by step around the store.
  - `backend`: the alias-based service's records and decisions. The alias
    generator that this service was written against was not available; its
    aliases here are fresh record ids in lower-case hexadecimal
    (`backend::handler::generate_alias`).
  - `frontend`: the state of the page that asks the alias-based service.
- `app/` holds the servers (actix-web and axum over MongoDB), the browser
  page (yew), and the serde forms of the library's types.
- `tests/` exercises the library on concrete values.
