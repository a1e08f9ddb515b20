# pomc

Parts of the POMC Minecraft client and of its launcher, written in Verus
with their behaviour stated in contracts and proved: the launcher's rules,
and the client's integer and text logic (light, block models, the greedy
mesher's bookkeeping, the bucket pool, images, chat, menus, controls, game
packets and block updates, the GPU setup choices). Rendering,
floating-point geometry and the network connection itself are not part of
it.

- `src/` is the verified library. Each module states what its functions do
  over mathematical models (`Seq`, `Map`, `Multiset`, spec functions) and
  proves laws that relate them (`law_*` proof functions):
  - launcher: `auth` (stored accounts, the OAuth callback, PKCE, request
    texts), `installations`, `storage`, `settings`, `downloader`;
  - game: `light`, `model` (block models and face textures), `mesher`,
    `buckets` (the GPU bucket pool for chunk meshes), `image` (pixel copies,
    atlases, sprite packing), `chat`, `menu`, `servers` (the server list
    screen), `hud`, `controls`, `interaction`, `net`, `packets` (what a
    game packet gives and is answered with), `drain` (block updates, their
    acknowledgements and chat lines in the game loop), `gpu` (device, queue
    family and swapchain choices), `sound`;
  - helpers: `text`, `search`; and the declared outside items: `clock`,
    `crypto` (base64, SHA-256, SHA-1, random bytes, URL encoding), and the
    greedy mesher of `binary_greedy_meshing` behind `mesher`.
- `tests/` runs the library on concrete values.
- `app/` is the program around it: argument parsing, the keyring, files,
  the browser callback listener, and reading the game's block assets.
