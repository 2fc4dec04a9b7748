# source_servers_list

Aggregates the `status` output of Source and GoldSrc game servers and
serves them as a live list to a web page.

- `src/` is the verified library (Verus):
  - `text` – searching, splitting, trimming and number conversions on text;
  - `listing` – the listings and the messages between server and page;
  - `status` – reading a server's answer to `status` and refreshing its listing;
  - `rcon` – RCON packets and datagrams, and the exchange that runs a command
    over TCP (Source) and falls back to UDP (GoldSrc);
  - `cache` – the listings made from the configuration, their refresh and the
    players known;
  - `ui` – what the page shows and how it reacts to messages and clicks;
  - `session` – the decisions of a connection, and the file route.
- `app/` runs it: the web server (Rocket), the sockets, the configuration
  file, and the page's browser glue.
- `tests/` exercises the library on concrete values.
