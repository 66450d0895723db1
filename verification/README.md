# Nostr Wallet Connect for Core Lightning

A plugin that lets one Nostr client pay invoices and read the balance of a Core Lightning
node, within limits on one invoice, on an hour and on a day. The wallet follows
[NIP-47](https://github.com/nostr-protocol/nips/blob/master/47.md).

The library under `src/` decides; it is written in Verus, and its contracts are proved.

* `cln_nwc`: the wallet. It judges events, admits and settles payments, tells the balance,
  and signs its answers.
* `limits`, `amount`, `clock`: what may be spent, what was, and in which hour and day.
* `nip47`, `client_request`, `nip04`, `event`, `keys`, `invoice`, `hex_text`, `json`,
  `text`: requests and responses, sealed messages, Nostr events, key pairs, invoices, and the
  texts that they are made of.
* `relay`: how the connection to the relay is kept up, and what is read from it.
* `config`: the text of the configuration file.

What `nostr-sdk`, `lightning-invoice`, `hex` and `std` compute is called through small
wrappers whose contracts are trusted; the doc comment of each says what is claimed.

The program under `app/` does what the library decides: it talks to the Lightning node, to
the relays and to the file system. `tests/` runs the library.

## Options

* `nostr_connect_wallet_secret`: secret key of the wallet, as `nsec` or in hexadecimal
* `nostr_connect_client_secret`: secret key of the client, as `nsec` or in hexadecimal
* `nostr_connect_relay`: relay to connect to, `ws://localhost:8080` unless given
* `nostr_connect_max_invoice_sat`: largest invoice to pay, in millisatoshis,
  1000000 unless given
* `nostr_connect_hour_limit_sat`: most to spend within an hour, in millisatoshis,
  10000000 unless given
* `nostr_connect_day_limit_sat`: most to spend within a day, in millisatoshis,
  35000000 unless given
* `nostr_connect_config_path`: path of the configuration file
