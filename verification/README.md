# ocr_translate

A desktop tool that recognizes text on the screen and translates it.

- `src/` is the library: the configuration and its INI syntax, the history, the
  settings form, pictures and their preparation for OCR, hotkeys, the tray menu,
  sessions and their locks, live translation, and the requests to and replies of
  translation services. Every function has a contract, and laws that hold across
  functions are public proof functions named `law_..`.
- `tests/` runs the library on concrete values.
- `app/` is the program around it: the command line, files, windows, the tray
  icon, screen capture, Tesseract and HTTP.

Sizes with a fraction (windows, fonts) stay texts in the library; the program
reads them as numbers.
