# bahilizator

Controller of a coin-operated machine that sells one kind of item: a coin
acceptor takes cash, a dispenser hands out items, two coin hoppers pay the
change, a 16×2 display and four buttons face the customer, an EEPROM keeps
the working state and a GSM modem sends reports by SMS and MQTT.

- `src/` is the library, verified with Verus: the vending cycle
  (`vending`), coin decoding (`coin_acceptor`), hopper control (`hopper`),
  the service menu (`menu`), display bus operations (`ui`), 1-Wire key
  reading (`ibutton`), state storage (`nvram`, `flash`), the event and
  transaction logs (`event`), SMS reports (`report`) and the modem
  protocols (`gsm`: CMUX framing, AT replies and URCs, SMS commands, DNS
  cache, MQTT helpers). Each step of the machine is a function from state
  and input to new state and actions, with its contract. Display lines,
  commands, reports and frames come in the fixed-capacity strings and
  buffers of the `heapless` crate (`fixed`).
- `app/` runs the tasks on the Embassy executor, performs the actions
  (display, hoppers, modem, EEPROM) and feeds the inputs back.
- `tests/` exercises the library on concrete values.
