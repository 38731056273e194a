# kart_stocks

A stream game in which Twitch viewers buy and sell shares in the current
Mario Kart race. Screenshots of the race are read by a vision language model
and a text recognizer; placement, held items and coins set the share price.

- `src/` is the verified library (Verus): the item table and the race state
  (`data`), the model's prompts and the reading of its replies (`llm`,
  `extract`), the shareholder ledger's rules (`portfolio`), chat commands and
  answers (`twitch`), the sign-in text handling and saved token (`twitch_auth`),
  frames: screenshot decoding, image files, cropping and JPEG (`obs`), the window's series and floating texts (`window`),
  nearest-reference selection (`phash`), loop pacing (`run`) and the text
  helpers they share (`text`).
- `app/` is the program around it: settings file, SQLite, OBS, the language
  model, OCR, Twitch chat, the hotkey and the macroquad window, plus the
  floating-point price equation.
- `tests/` runs the library on concrete values.
