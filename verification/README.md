# csac_client

The core of the CsAC desktop chat client, written in Verus: the functions
in `src/` carry contracts that Verus proves. Ten small functions around
outside crates (`String::push`, two regular expression matches, AES-CBC
decryption in three key sizes, Base64 decoding, HTTP method parsing, and
JSON parsing with its conversion of serde_json values) are marked
`external_body`: their contracts are trusted, not proved, and their doc
comments say what they claim.

- `src/` — the verified library.
  - `text`, `json`, `hex`: character sequences, the JSON values exchanged
    with the server, hexadecimal and PKCS#7.
  - `cookie`, `endpoint`: the challenge cookie cache and the entry points a
    request is sent to, with the site remembered between requests.
  - `response`, `vmhost`: what a response text means, and the hosting
    provider's AES challenge and its `__test` cookie.
  - `upload`, `flow`: what a request or upload sends, and the decisions of
    one call as a state machine (next entry point, retry, final answer).
  - `frontend`, `ui`, `actions`: how the user interface reads answers, its
    texts, and the parameters of its actions.
- `app/` — the shell: HTTP with reqwest, serde conversions, and the loop
  that drives a call's state machine.
- `tests/` — tests on concrete values, run against the compiled library.
