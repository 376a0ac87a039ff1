# ridgeline

A pull request monitor for Azure DevOps organizations, with its logic verified
by Verus.

- `src/` is the library: the configuration model, the request paths and the
  retry policy of the Azure DevOps client, the mapping of its answers onto a
  provider-neutral model, combining a poll's answers, build status from policy
  evaluations and its cache, change detection for notifications (with its
  saved state), the dashboard's filters, key bindings and navigation, the
  setup wizard's state machine, and the texts the screens show. Every
  function carries a contract that Verus proves; the few calls into `std`,
  `chrono`, `base64` and `dirs` sit behind small trusted wrappers whose
  contracts are documented next to them.
- `app/` is the terminal program around it: command line, files, HTTP,
  desktop notifications and the iocraft screens.
- `tests/` runs the library on concrete values.
