# touch-fish

A terminal reader for Zhihu, V2EX, Hupu, NGA, Linux.do, Tieba, a stock watch
list and local e-books, with a boss key and a camouflage skin.

The library in `src/` is verified with Verus:

- `app/`: the reader's state machine. Key presses and the network worker's
  replies go in; the new state and the work to do (requests, saving a cookie,
  opening an image) come out.
- `platform/`: reading each site's pages and API replies into list rows and
  answer pages (HTML through `scraper`, XML through `quick-xml`), URL building,
  the Yahoo price frames, the stock watch list.
- `book/`: EPUB (read from the archive's bytes through `zip`), MOBI (parsed
  from its bytes through `mobi` once its record table is checked, text records
  and PalmDoc decompression), the chapters of a PDF's text,
  DOCX/ODT/FB2/HTML/RTF/plain text, chapter splitting, reading positions and
  the progress file.
- `ui.rs`: the pure parts of rendering (one-line truncation, to-do marks,
  the decoy transcript blocks, the camouflaged answer layout).
- `config/`: the settings and per-site cookies.

`app/` holds the executable: terminal I/O (`crossterm`, `ratatui`), HTTP
(`reqwest`), the WebSocket client, the JavaScript signer (`rquickjs`), files,
serde copies of the library's types, the stock price arithmetic, which
uses floating point, and the two outside decoders that can panic on malformed
input with no condition on the bytes to rule it out: `pdf-extract` and the
`mobi` crate's Huffman decoder.
