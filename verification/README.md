# jiji-activities

A command-line tool for the activities of a compositor: named sets of
workspaces that one switches between. It lists, creates, renames, removes and
saves activities, switches between them, and moves windows and workspaces into
them, by name or by way of a menu.

`src/` is the library. All of it is verified with Verus. A subcommand never
talks to the compositor, a menu program or the file system itself: it hands out
steps, and each answer is handed to the matching `resume_*` function until the
last step says how the subcommand ended. What a subcommand asks for, and what it
makes of every answer, is stated in the contracts.

| module                                | what it holds                                       |
| ------------------------------------- | --------------------------------------------------- |
| `flow`, `resume`                      | steps, and how a subcommand goes on after each      |
| `cli`                                 | the subcommands and how each of them begins         |
| `error`                               | failures, their messages and exit codes             |
| `ipc`, `ipc_helpers`                  | requests and replies                                |
| `picker`                              | what menus are fed, and what their answers mean     |
| `move_window`, `move_workspace`, ...  | one module for each subcommand                      |
| `config_scan`, `config_document`      | the text of the config file, and its nodes          |
| `save`                                | declaring an activity in the config file            |
| `text`, `order`, `search`             | strings, stable sorting, searching                  |
| `laws`                                | what holds of all subcommands                       |

`app/` is the program around it: arguments, the socket, menu programs, files and
printing. `tests/` runs the library on concrete values.
