# rnd

A notification daemon for the FDO Desktop Notifications interface, with a
companion command-line tool, `rndctl`.

- `src/` is the library, with every function under a checked contract: the
  notification manager (which cards are on screen and what each request
  does), the bounded history, the settings, icon selection and geometry,
  the bus-side decisions (ids, capabilities, the history report), what
  `rndctl` prints, the command line and the installer's file contents. The
  laws of the manager and of the history are proof functions.
- `app/` is the program around it: GTK4 layer-shell popups, the zbus
  servers, file access and `systemctl`. The one binary acts as `rndctl`
  when started under that name; `rnd --install` installs it under both.
- `tests/` exercises the library on concrete values.
