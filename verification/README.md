# upholi

The verified core of an end-to-end encrypted photo library, written in
Verus.

The library (`src/`) holds the logic, each function with a contract that
Verus proves:

- `encryption`, `items`, `keys`, `passwords`, `hashing`, `encoding`,
  `random`: AES-128-GCM-SIV encryption of items under keys derived from
  passwords (PBKDF2-SHA512), the keys kept in the browser's local storage,
  hashes and base64 text.
- `models`, `library`, `albums`, `shares`, `uploads`, `photo_files`,
  `client`, `client_helper`, `entities`, `exif`, `multipart`: the user's
  library of photos, albums and shares, and what the browser client does to
  it, with the requests it sends.
- `server`: the rules of the server: photo file names, sessions, settings,
  storage paths, collections and the checks of its request handlers.
- `legacy`: the fixed albums of the first server.

The outside crates (`aes-gcm-siv`, `pbkdf2`, `sha2`, `md5`, `base64`,
`rand`, `rexif`, `chrono`) are called through small trusted functions whose
contracts state what their documentation and source promise.

`app/` holds what stays outside the verifier: the JSON forms of the records,
EXIF coordinates as floating point numbers, reading the server's settings
from its configuration file and the environment, reading and writing photo
files on disk, and encrypting serializable items. `tests/` exercises the library on concrete values.
