# powerplan

A verified library for a power-plan tool for Windows laptops. It makes every AC
(plugged-in) power setting of the active plan, outside the Sleep subgroup,
equal its DC (battery) value, checks the processor settings for AC/DC
agreement, can disable or restore the vendor services that override power policy,
and installs scheduled tasks that apply the settings again.

The library (`src/`, verified with Verus) holds the logic:

- `text`, `classes`, `grammar`: string operations and the patterns that read
  what `powercfg` and `sc` print, each with a specification of what it matches.
- `labels`: the proof that the query readers capture the same text when
  labels are switched between English and Chinese (or change case) anywhere
  in a line, except where a value directly before an English index label
  could run into its first letter.
- `decode`: decoding a command's output (UTF-16LE, UTF-8, or GB18030).
- `command`: command lines, and how a command's exit status and output become
  a result.
- `powercfg`: parsing plan lists and plan queries, comparing AC and DC values,
  choosing the settings to align (all but the Sleep subgroup), and the
  baseline of processor settings that the re-apply script writes back.
- `optimize`: the progress and messages of one alignment run.
- `tasks`, `script`: the PowerShell and `schtasks` commands that register,
  check, run and remove the scheduled tasks, and the re-apply script.
- `services`: finding, disabling and restoring the power-policy services.
- `backup`: naming and exporting plan backups.

`app/` is the desktop shell around it: it starts the processes, reads and
writes files under the user profile, and exposes the commands to the Tauri
front end. `tests/` checks the library on concrete values.
