# fluxvt

The logic of a terminal emulator, with proofs.

`src/` is the library. A terminal is a `TerminalState`; its view is a `Screen`, a
mathematical value, and every operation is specified by what it does to that value.

| module | contents |
| --- | --- |
| `terminal` | the state, printing, control characters, scrolling, sizes, the alternate screen |
| `csi`, `erase`, `grid`, `sgr` | control sequences |
| `osc`, `reply` | operating system commands, and what is sent back |
| `frame`, `color`, `cell` | what is shown |
| `stream` | the byte stream: what the parser finds in it, and how a terminal takes it in |
| `clipboard` | selecting, copying and pasting |
| `window` | key presses, window sizes, the shell |
| `model` | the view and its basic operations |
| `integrity`, `laws`, `transcript` | what every operation keeps, and what holds of operations together |

A function that cannot be carried out in some states has a partner that tells whether
it can (`accepts_print`, `accepts_execute`, `accepts_csi`, `accepts_event`,
`accepts_resize`, `accepts_window`). A well-formed terminal accepts everything.

Colours are exact: a channel value `n` stands for the intensity `n / 1020`. Font and
cell sizes are in tenths of a pixel.

`app/` opens the window, draws, and runs the shell on a pseudo-terminal.
