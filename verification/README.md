# Stagehand

Browser automation with a language model: a page is observed, acted upon and
extracted from by instructions in plain words. The browser runs on this machine
or at Browserbase; in the second case the Stagehand service can do the work.

The library under `src/` holds the rules of this, with contracts that Verus
proves. It does no input or output of its own: where something has to be asked
of a browser, a service or a language model, a value of the library says what
to ask and takes the answer.

- `config`, `browser`, `runtime`: from the configuration and the environment to a
  plan for the browser, the parameters of a session, and the pages of the browser.
- `context`, `page_sync`: the session, with its pages, their frames and the
  active page, kept in step with the browser.
- `a11y`, `cdp`, `selectors`, `settle`: the accessibility tree, the questions it
  takes to build it, the selectors of elements, and when a page has settled.
- `prompts`, `llm`, `observe`, `skim`, `act`, `scripts`, `extract`, `references`:
  what the language model is asked, and what is made of its answers.
- `client`, `page`, `stagehand`: the requests to the service and its answers.
- `logging`, `metrics`, `quickstart`: records for the log, usage, the quickstart.
- `text`, `json`, `merge`, `keys`, `table`, `types`: what the rest is written with.

`app/` is the program around the library: it drives the browser, sends the
requests and reads the command line. `tests/` runs the library on given values.

    BROWSERBASE_API_KEY=... BROWSERBASE_PROJECT_ID=... MODEL_API_KEY=... \
        stagehand quickstart --mode browserbase
    STAGEHAND_CHROME_BIN=/path/to/chrome MODEL_API_KEY=... \
        stagehand quickstart --mode local --show-browser

Two examples stand in `app/examples.rs`:

    stagehand example browserbase-quickstart
    STAGEHAND_CHROME_BIN=/path/to/chrome stagehand example local-highlight
