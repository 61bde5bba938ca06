# Aegira

Aegira watches a log file, recognises incidents by rules, and restarts the service or container
that a rule names. It then checks that the restart has helped.

There are two engines:

- `managed`: installed as a systemd service. It has a configuration file and one file of rules,
  sends alerts, and bounds the recoveries of each rule within a time window.
- `standalone`: runs without a configuration. It reads its rules from two directories.

## Layout

- `src/`: the decisions of both engines, verified with Verus. Nothing in it does input or output:
  functions take what was read and return what to do.
- `app/`: the programs round the library. They read files, run commands, wait and log.
- `tests/`: tests of the library.

## Safety

The proof functions whose names begin with `law_` state what the library promises. Among them:

- remediations run nothing but restarts by `systemctl` or `docker` (`law_only_restarts_are_run`),
  and verifications nothing but queries to them (`law_only_queries_verify`);
- Aegira does not restart itself (`law_never_restarts_itself`);
- in the free mode no container is touched (`law_free_mode_leaves_containers_alone`);
- each new line of the log is judged once, in order (`law_new_lines_are_judged_once`,
  `law_new_incidents_are_taken_up_once`);
- recoveries are bounded by `max_recovery_attempts` within `recovery_window_secs`
  (`law_recovery_attempts_are_bounded`).

The mail command for alerts is no rule's: it comes from the configuration.

What is taken from the standard library without proof stands in `src/unicode.rs`.
