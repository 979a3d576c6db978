# dahuavto

A bridge between Dahua VTO door stations and home automation. It keeps a connection to each
station, notices calls (from the station's own events or from SIP on the wire), and opens doors on
request: from the web interface, a button on a GPIO pin, Home Assistant over MQTT, or the Bafa
cloud.

The library in `src/` says what is to be done and is verified with Verus. `app/` does it: sockets,
files, timers, the routes of the web interface, and MQTT.

| module | what it decides |
| --- | --- |
| `config`, `config_laws` | the text form of the configuration, and that what is written is read back |
| `text`, `table` | plain operations on text, and a table keyed by text |
| `course` | the steps of a plan, and which failure ends it |
| `json` | the JSON that is written, and what is read of JSON that came in |
| `frame` | the packets of the DHIP protocol |
| `digest` | the password hash of the login |
| `dahuavto` | the client of one station: connecting, login, signs of life, requests and answers |
| `session` | the way to a session with a station: connecting, challenge, answer |
| `events` | the subscription to a station's events |
| `door` | the requests that open a door and end the call |
| `sip` | calls seen on the wire |
| `gpio` | the pins: notifying of calls, and buttons |
| `http_server` | who is calling, which door a request opens, who is let in, the configuration |
| `mqtt`, `bafa_cloud` | what is announced to a broker, and what its messages lead to |

A client that a test or `app/` holds is known to the server by its number, moments are nanoseconds
since the epoch, and the outcome of anything done outside is handed back to the library as a plain
value.
