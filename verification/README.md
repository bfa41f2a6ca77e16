# jito_downloader

A concurrent downloader with a just-in-time optimizer (JITO): it probes a server, judges the
connection, picks a transfer strategy, and fetches the file in byte ranges with retries.

Everything the downloader decides is a library, written in Verus and proved against its
contracts, down to the speeds that the verdict on a connection rests on. The program around it
sends and times requests, reads and writes files, and prints.

| Module | What it holds |
| :--- | :--- |
| `logic` | validation of links, paths and options; file names; sizes and the integrity check |
| `address` | loopback and private addresses of IPv6 |
| `link` | links taken apart by the `url` crate, percent-decoding by `urlencoding` |
| `jito` | server profiles, probe results, and the settings that follow from them |
| `probe` | capabilities and the result of probing a server |
| `quality` | the batches that measure a connection, and the verdict on it |
| `net` | header values, the size a server states, and the cutting of a file into ranges |
| `range_transfer` | the retries of one byte range |
| `single_stream` | the attempts at a whole file |
| `session` | how the user's options and the optimizer's settings come together |
| `error` | what can go wrong, and its messages |
| `ratio`, `numbers`, `text` | fractions, bounds and sums, characters and numerals |

Rates and factors are exact fractions (`ratio`). Public proof functions named `law_..` state what
holds across functions: the ranges of a file cover every byte once, pauses double up to five
seconds, a cached profile gives back the threads, the writers and the range size that were
selected, and so on.

What is not proved is marked `external_body`, `assume_specification` or `uninterp` and says
above it which function of `url`, `urlencoding` or std it stands for.

`app/` is the command-line program:

    jito_downloader --jito --link "URL" --threads 16
