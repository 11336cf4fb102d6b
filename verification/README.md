# kino_relay

The verified core of a WebSocket relay. Agents behind NAT dial out to the relay
and park a control channel; a manager asks for an agent; the relay tells the
agent, which dials back with a data socket; the relay splices the two.

`src/` is a Verus library. Every decision the relay takes stands there with a
contract:

| Module | What it decides |
|--------|-----------------|
| `auth` | whether a request passes: static token, signed token, role and scope |
| `headers`, `jwt` | bearer tokens, keys and claims |
| `base64`, `object`, `json` | the encoding of claims, and the JSON that is read and written |
| `agents` | which connection an agent is reached by |
| `sessions` | which data socket belongs to which manager, and when a request is given up |
| `control`, `bridge` | what is sent on a control channel and between bridged sockets |
| `ids` | connection tokens and session identifiers |
| `enroll`, `startup` | self-enrollment with a control plane, and what the settings mean |
| `tls` | the TLS configuration |
| `text` | text helpers |

Properties that span several calls are public proof functions named `law_...`.
Calls into other crates are confined to small functions marked
`#[verifier::external_body]`, each with a comment that says what is believed of
the call.

`app/` is the program around the library: sockets, tasks, files and the terminal.

A relay looks for the control plane's key in the file that `RELAY_JWT_PUBLIC_KEY`
names, or in `control.pub.pem`, which is also where an enrollment saves it. So a
restart after an enrollment finds the key and spends no second code.
