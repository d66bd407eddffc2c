# eslauncher2

The logic of ESLauncher2, a program that installs, updates and runs copies
("instances") of the game Endless Sky and manages its plug-ins, written in Verus
with its behaviour stated in contracts and proved.

- `src/` is the verified library: plug-in bookkeeping (`plugins`), zip layout
  (`unzip`, `archive`), the GitHub API bookkeeping (`github`), instances and how
  they are installed and updated (`instance`, `install`, `install_frame`), the
  launcher window's state machine and its instance map (`launcher`, `frames`,
  `settings`, `plugins_frame`, `style`), the log box (`logger`) and string
  helpers (`text`).
- `tests/` exercises the library on concrete values.
- `app/` is a command-line front end that does the file, network and process work
  around the library.
