# yotsuba

The logic of YotsubaCTF, a Discord bot for CTF teams, as a verified library:
what each slash command is asked, what it answers, how its page buttons are
named and read back, which members may run it, the rules of reminders, the
encodings of `/cipher`, the requests to CTFtime, and the event worker's
combining and ordering of events.

- `src/` is the library, verified with Verus. Each module covers one command
  or concern; `text` and `num` hold the character and number handling that
  the others share, and `time` the instants the reminders work with.
- `tests/` runs the library on concrete values.
- `app/` is the program around it: the Discord gateway, the database, the
  HTTP requests, and the conversions between Discord's types and the
  library's.
