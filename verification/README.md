# Electrode command authority

The boundary between browser peers and vehicle peers of a ground station.
Browser and vehicle use separate sessions; nothing crosses from the browser to
the vehicle unless an explicit mapping accepts it.

| Intent under `gcs/v1/cmd/` | Delivered as |
| --- | --- |
| `velocity` | published to `synapse/v1/topic/local_position_command` |
| `velocity_budget` | answered with the state of the team's budget |
| `manual` | published to `synapse/v1/topic/manual_control_command` |
| `radio` | published to `synapse/v1/topic/radio_control` |
| `gain` | queried under `synapse/v1/cmd/param_set` |
| `raw/<leaf>` | published to `synapse/v1/topic/<leaf>`, at most 4 KiB |
| `firmware/<id>/{start,chunk/<index>,commit}` | staged for the firmware gate |

Velocity commands, raw ones included, travel in an envelope
`magic(4) | name_len(1) | name | payload` with the magic `EVC1`, `EVB1` (state
request) or `EVR1` (raw), and each takes one out of at most five from the budget
of the team that it names. The counts live in a CSV; a JSON mirror is written
beside it and never read.

## Layout

- `src/`: the verified library. It decides, and owns no session, file or clock.
  - `policy`, `payload`, `credential`: which intents are accepted, and as what.
  - `velocity_budget`, `csv`, `ledger`: the budget and its CSV.
  - `runtime`, `status`, `dispatch`: settings, what is reported, what comes next.
  - `text`, `number`, `speed`: text as the CSV and the settings need it.
  - `wire`: calls into `flatbuffers`, `synapse_fbs` and `serde_json`.
  - `csv_laws`, `budget_laws`, `course_laws`, `policy_laws`, `limit_laws`,
    `dispatch_laws`: what holds of all of it, proved.
- `tests/`: tests of the library against concrete values.
- `app/`: the Zenoh runtime, the budget files and the JSON mirror.

Speeds are kept as text and compared by their bit patterns. The CSV is written
with the shortest text of each number, which `wire` gets from `synapse_fbs` and
the standard library; the mirror shows numbers.
