# LTEngine

Local machine translation API, compatible with LibreTranslate. Large language models run on the
machine itself through llama.cpp.

## Layout

* `src/`: the library, verified with Verus. It decides which requests are refused, how prompts are
  phrased, how a model is brought up with as many layers on the GPU as it bears, how output is
  generated, bounded and cleaned, what is kept in the cache and what is measured.
* `app/`: the program around it: command line, HTTP server, model downloads, and the inference
  thread that calls llama.cpp.
* `tests/`: tests of the library.

## Modules of the library

| Module       | What it holds                                                           |
| ------------ | ----------------------------------------------------------------------- |
| `api`        | Checks of requests, the way of a translation, answers, language listing |
| `engine`     | Errors, state and queue of the engine, bringing up a model              |
| `generation` | From a request to its prompt, from token to token to the answer         |
| `batch`      | Batches of tokens at their positions                                    |
| `loader`     | CPU or GPU, batch sizes, placement of layers, warmup                    |
| `llm`        | A model without a queue, one context per prompt                         |
| `prompt`     | TranslateGemma and chat prompts                                         |
| `template`   | Which chat templates are safe to render                                 |
| `languages`  | The languages and their detection                                       |
| `formatting` | Cleaning output, matching the style of the source                       |
| `markup`     | HTML as Markdown and back                                               |
| `cache`      | Least-recently-used cache of translations                               |
| `metrics`    | Counters, gauges and histograms, and their text form                    |
| `models`     | Downloadable models and local model files                               |
| `config`     | Settings and their defaults                                             |
| `text`       | Text operations over characters                                         |

Public proof functions named `law_…` state what holds of the library as a whole.
