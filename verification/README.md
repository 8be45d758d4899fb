# delray

A network traffic analyzer for Linux servers: it captures the traffic of one
interface and shows which processes and which peer addresses it belongs to.

The library in `src/` holds the logic, each function with a contract proved
by Verus:

- `capture`, `headers`, `net`: decoding captured frames into one-way flows;
- `stats`, `rank`, `seqs`: cumulative statistics and ranked snapshots;
- `proc_table`, `attribution`: the socket-to-process table and the queue of
  traffic that waits for its process;
- `domain_parse`: the server name of a TLS ClientHello;
- `interfaces`, `cli`, `palette`, `view`, `pipeline`, `report`, `text`:
  choosing an interface, option values, colours, the interaction state of the
  terminal view, the decisions of the worker threads, and report text.

`app/` is the program around it: command line, libpcap capture, the process
table refresher, threads, the terminal view and file output.
